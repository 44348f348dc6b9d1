//! What a single operation is for: how its result and the state after it go with the entries of the
//! state before.
use vstd::prelude::*;

use crate::context::{compile_job, decimal};
use crate::control::{
    callable, control_point, counted, entered, fresh, pending_checked, tried, ControlPoint, JitView,
};
use crate::hot_counts::count_of;
use crate::traces::settable;
use crate::types::{HotCount, JitLocation, JitPhase, JitTrace, JitTransition};

verus! {

/// The store has an entry for `loc`, and the entry is `trace`.
pub open spec fn holds(
    traces: Map<JitLocation, JitTrace>,
    loc: JitLocation,
    trace: JitTrace,
) -> bool {
    traces.dom().contains(loc) && traces[loc] == trace
}

// ---- The trace store ----

/// A finished trace may be stored exactly where the entry is the pending marker: neither where there
/// is no entry nor where the trace is already finished.
pub proof fn law_finished_trace_needs_marker(
    traces: Map<JitLocation, JitTrace>,
    loc: JitLocation,
)
    ensures
        settable(traces, loc, JitTrace::FinalisedTrace) <==> holds(
            traces,
            loc,
            JitTrace::TracePending,
        ),
        !traces.dom().contains(loc) ==> !settable(traces, loc, JitTrace::FinalisedTrace),
        holds(traces, loc, JitTrace::FinalisedTrace) ==> !settable(
            traces,
            loc,
            JitTrace::FinalisedTrace,
        ),
{
}

/// A pending marker may be stored exactly where there is no entry.
pub proof fn law_marker_needs_no_entry(traces: Map<JitLocation, JitTrace>, loc: JitLocation)
    ensures
        settable(traces, loc, JitTrace::TracePending) <==> !traces.dom().contains(loc),
{
}

/// Stores come in one order only. At any time at most one kind of store is admitted for a location;
/// what was just stored is not admitted again; a marker admits the finished trace; and a finished
/// trace admits nothing.
pub proof fn law_stores_come_in_order(
    traces: Map<JitLocation, JitTrace>,
    loc: JitLocation,
    trace: JitTrace,
)
    requires
        settable(traces, loc, trace),
    ensures
        forall|other: JitTrace| #[trigger] settable(traces, loc, other) ==> other == trace,
        !settable(traces.insert(loc, trace), loc, trace),
        settable(traces.insert(loc, trace), loc, JitTrace::FinalisedTrace) <==> trace
            == JitTrace::TracePending,
        !settable(traces.insert(loc, trace), loc, JitTrace::TracePending),
{
}

/// What may be stored for a location depends on the location's entry alone: not on other entries,
/// and not on which location it is.
pub proof fn law_store_depends_on_the_entry(
    traces_a: Map<JitLocation, JitTrace>,
    traces_b: Map<JitLocation, JitTrace>,
    a: JitLocation,
    b: JitLocation,
    trace: JitTrace,
)
    requires
        traces_a.dom().contains(a) <==> traces_b.dom().contains(b),
        traces_a.dom().contains(a) ==> traces_a[a] == traces_b[b],
    ensures
        settable(traces_a, a, trace) == settable(traces_b, b, trace),
{
}

// ---- The hot counts ----

/// A hot count is the location's entry, or zero where there is none. Writing an entry gives that
/// location the count that was written, and no other location a new one.
pub proof fn law_hot_count_is_the_entry(
    counts: Map<JitLocation, HotCount>,
    loc: JitLocation,
    other: JitLocation,
    count: HotCount,
)
    ensures
        counts.dom().contains(loc) ==> count_of(counts, loc) == counts[loc],
        !counts.dom().contains(loc) ==> count_of(counts, loc) == 0,
        count_of(counts.insert(loc, count), loc) == count,
        other != loc ==> count_of(counts.insert(loc, count), other) == count_of(counts, other),
{
}

// ---- Compilations ----

/// A decimal digit.
pub open spec fn is_digit(c: char) -> bool {
    '0' <= c <= '9'
}

/// The number that a sequence of decimal digits stands for, read from left to right.
pub open spec fn number_read(digits: Seq<char>) -> int
    decreases digits.len(),
{
    if digits.len() == 0 {
        0
    } else {
        10 * number_read(digits.drop_last()) + (digits.last() as int - '0' as int)
    }
}

proof fn lemma_decimal(n: nat)
    ensures
        decimal(n).len() >= 1,
        forall|i: int| 0 <= i < decimal(n).len() ==> is_digit(#[trigger] decimal(n)[i]),
        decimal(n)[0] == '0' ==> n == 0,
        n == 0 ==> decimal(n).len() == 1,
        number_read(decimal(n)) == n,
    decreases n,
{
    let text = decimal(n);
    if n < 10 {
        assert(text.drop_last() =~= Seq::empty());
        assert(number_read(text.drop_last()) == 0);
    } else {
        lemma_decimal(n / 10);
        assert(text.drop_last() =~= decimal(n / 10));
        assert(text[0] == decimal(n / 10)[0]);
    }
}

/// A compilation is named after its location: the name is "compile_loc_" and then digits only,
/// without a leading zero unless the location is zero, which read back as the location.
pub proof fn law_job_name_tells_its_location(loc: JitLocation)
    ensures
        ({
            let name = compile_job(loc).name;
            let prefix = "compile_loc_"@;
            let digits = name.skip(prefix.len() as int);
            &&& name.len() > prefix.len()
            &&& name.take(prefix.len() as int) == prefix
            &&& forall|i: int| 0 <= i < digits.len() ==> '0' <= #[trigger] digits[i] <= '9'
            &&& digits[0] == '0' ==> loc == 0 && digits.len() == 1
            &&& number_read(digits) == loc
        }),
        compile_job(loc).loc == loc,
{
    let name = compile_job(loc).name;
    let prefix = "compile_loc_"@;
    let digits = name.skip(prefix.len() as int);
    lemma_decimal(loc as nat);
    assert(digits =~= decimal(loc as nat));
    assert(name.take(prefix.len() as int) =~= prefix);
    assert forall|i: int| 0 <= i < digits.len() implies '0' <= #[trigger] digits[i] <= '9' by {
        assert(is_digit(decimal(loc as nat)[i]));
    }
}

/// Two compilations with the same name are of the same location.
pub proof fn law_job_names_are_distinct(a: JitLocation, b: JitLocation)
    requires
        compile_job(a).name == compile_job(b).name,
    ensures
        a == b,
{
    law_job_name_tells_its_location(a);
    law_job_name_tells_its_location(b);
}

// ---- A call of the control point ----

/// At first nothing has been counted, traced or compiled.
pub proof fn law_fresh_state_is_empty()
    ensures
        forall|loc: JitLocation| !(#[trigger] fresh().traces.dom().contains(loc)),
        forall|loc: JitLocation| !(#[trigger] fresh().counts.dom().contains(loc)),
        fresh().jobs.len() == 0,
{
}

/// A call can be made wherever the thread is not running a trace, unless it would have to count a
/// location whose hot count is exhausted.
pub proof fn law_when_a_call_can_be_made(jit: JitView, phase: JitPhase, loc: JitLocation)
    ensures
        !callable(jit, phase, loc) <==> {
            ||| phase is RunningTrace
            ||| phase is Interpreting && !holds(jit.traces, loc, JitTrace::FinalisedTrace)
                && jit.counts.dom().contains(loc) && jit.counts[loc] == 0xffff_ffff
        },
{
}

/// A call reports that it executed a trace exactly when the thread interprets and the location's
/// trace is finished. It then leaves everything as it was.
pub proof fn law_executes_what_is_finished(jit: JitView, phase: JitPhase, loc: JitLocation)
    requires
        callable(jit, phase, loc),
    ensures
        ({
            let (after, phase1, transition) = control_point(jit, phase, loc);
            &&& transition == JitTransition::ExecutedTrace <==> phase == JitPhase::Interpreting
                && holds(jit.traces, loc, JitTrace::FinalisedTrace)
            &&& transition == JitTransition::ExecutedTrace ==> after == jit && phase1 == phase
        }),
{
}

/// A call counts its location, by one, exactly when the thread interprets and does not execute a
/// trace, and says so by one of two transitions. No other hot count changes, ever.
pub proof fn law_counts_what_is_interpreted(
    jit: JitView,
    phase: JitPhase,
    loc: JitLocation,
    other: JitLocation,
)
    requires
        callable(jit, phase, loc),
        other != loc,
    ensures
        ({
            let (after, phase1, transition) = control_point(jit, phase, loc);
            let before = if jit.counts.dom().contains(loc) {
                jit.counts[loc] as int
            } else {
                0
            };
            let interpreted = phase == JitPhase::Interpreting && !holds(
                jit.traces,
                loc,
                JitTrace::FinalisedTrace,
            );
            &&& (transition == JitTransition::IncrementedHotCount || transition
                == JitTransition::StartedTracing) <==> interpreted
            &&& interpreted ==> after.counts.dom() == jit.counts.dom().insert(loc)
                && after.counts[loc] == before + 1
            &&& !interpreted ==> after.counts == jit.counts
            &&& after.counts.dom().contains(other) == jit.counts.dom().contains(other)
            &&& jit.counts.dom().contains(other) ==> after.counts[other] == jit.counts[other]
        }),
{
    let (after, phase1, transition) = control_point(jit, phase, loc);
    if phase == JitPhase::Interpreting && !holds(jit.traces, loc, JitTrace::FinalisedTrace) {
        assert(after.counts.dom() =~= jit.counts.dom().insert(loc));
    }
}

/// A call starts tracing exactly when a thread interprets a location without an entry in the store
/// for the tenth time. The store then holds the location as pending, and the thread traces it. No
/// other call, and no other location, changes the store.
pub proof fn law_tenth_time_starts_tracing(
    jit: JitView,
    phase: JitPhase,
    loc: JitLocation,
    other: JitLocation,
)
    requires
        callable(jit, phase, loc),
        other != loc,
    ensures
        ({
            let (after, phase1, transition) = control_point(jit, phase, loc);
            let started = phase == JitPhase::Interpreting && !jit.traces.dom().contains(loc)
                && jit.counts.dom().contains(loc) && jit.counts[loc] == 9;
            &&& transition == JitTransition::StartedTracing <==> started
            &&& started ==> {
                &&& after.traces.dom() == jit.traces.dom().insert(loc)
                &&& holds(after.traces, loc, JitTrace::TracePending)
                &&& after.counts[loc] == 10
                &&& phase1 == JitPhase::Tracing(loc)
            }
            &&& !started ==> after.traces == jit.traces
            &&& after.traces.dom().contains(other) == jit.traces.dom().contains(other)
            &&& jit.traces.dom().contains(other) ==> after.traces[other] == jit.traces[other]
        }),
{
    let (after, phase1, transition) = control_point(jit, phase, loc);
    if transition == JitTransition::StartedTracing {
        assert(after.traces.dom() =~= jit.traces.dom().insert(loc));
    }
}

/// A call finishes tracing exactly when it comes back to where the thread's trace began. One
/// compilation of that location is then started, behind those that were started before, and the
/// thread interprets. No other call starts a compilation.
pub proof fn law_loop_closed_finishes_tracing(jit: JitView, phase: JitPhase, loc: JitLocation)
    requires
        callable(jit, phase, loc),
    ensures
        ({
            let (after, phase1, transition) = control_point(jit, phase, loc);
            &&& transition == JitTransition::FinishedTracing <==> phase == JitPhase::Tracing(loc)
            &&& phase == JitPhase::Tracing(loc) ==> {
                &&& after.jobs.len() == jit.jobs.len() + 1
                &&& after.jobs.drop_last() == jit.jobs
                &&& after.jobs.last().loc == loc
                &&& after.traces == jit.traces
                &&& after.counts == jit.counts
                &&& phase1 == JitPhase::Interpreting
            }
            &&& phase != JitPhase::Tracing(loc) ==> after.jobs == jit.jobs
        }),
{
    let (after, phase1, transition) = control_point(jit, phase, loc);
    if phase == JitPhase::Tracing(loc) {
        assert(after.jobs.drop_last() =~= jit.jobs);
    }
}

/// A call goes on tracing exactly when the thread traces and has not come back to where its trace
/// began. It then leaves everything as it was.
pub proof fn law_elsewhere_tracing_goes_on(
    jit: JitView,
    phase: JitPhase,
    loc: JitLocation,
    start_loc: JitLocation,
)
    requires
        callable(jit, phase, loc),
    ensures
        ({
            let (after, phase1, transition) = control_point(jit, phase, loc);
            &&& transition == JitTransition::ContinuedTracing ==> phase is Tracing && phase
                != JitPhase::Tracing(loc)
            &&& phase == JitPhase::Tracing(start_loc) && start_loc != loc ==> {
                &&& transition == JitTransition::ContinuedTracing
                &&& after == jit
                &&& phase1 == phase
            }
        }),
{
}

/// A thread's phase changes only where it starts or finishes tracing.
pub proof fn law_phase_follows_transition(jit: JitView, phase: JitPhase, loc: JitLocation)
    requires
        callable(jit, phase, loc),
    ensures
        ({
            let (after, phase1, transition) = control_point(jit, phase, loc);
            &&& phase1 != phase <==> transition == JitTransition::StartedTracing || transition
                == JitTransition::FinishedTracing
            &&& phase1 == JitPhase::Tracing(loc) <==> transition == JitTransition::StartedTracing
            &&& phase1 == JitPhase::Interpreting <== transition == JitTransition::FinishedTracing
        }),
{
}

// ---- The visits of a call ----

/// Entering the control point: an interpreting thread looks for a trace, a tracing thread compiles
/// where its trace began, and is done anywhere else.
pub proof fn law_how_a_call_begins(loc: JitLocation, start_loc: JitLocation)
    ensures
        entered(JitPhase::Interpreting, loc) == (ControlPoint::TryExec { loc }),
        entered(JitPhase::Tracing(loc), loc) == (ControlPoint::Compile { loc }),
        start_loc != loc ==> entered(JitPhase::Tracing(start_loc), loc) == (
        ControlPoint::Finished { transition: JitTransition::ContinuedTracing }),
{
}

/// Looking for a trace: the call is over exactly where there is a finished one.
pub proof fn law_how_a_trace_is_looked_for(
    traces: Map<JitLocation, JitTrace>,
    loc: JitLocation,
)
    ensures
        tried(traces, loc) == (ControlPoint::Finished {
            transition: JitTransition::ExecutedTrace,
        }) <==> holds(traces, loc, JitTrace::FinalisedTrace),
        tried(traces, loc) == (ControlPoint::Count { loc }) <==> !holds(
            traces,
            loc,
            JitTrace::FinalisedTrace,
        ),
{
}

/// Counting: the call goes on exactly where it counted to ten.
pub proof fn law_where_a_location_becomes_hot(count: int, loc: JitLocation)
    ensures
        counted(count, loc) == (ControlPoint::CheckPending { loc }) <==> count == 10,
        counted(count, loc) == (ControlPoint::Finished {
            transition: JitTransition::IncrementedHotCount,
        }) <==> count != 10,
{
}

/// Checking for a marker: the call is over exactly where there is one.
pub proof fn law_how_a_marker_is_looked_for(
    traces: Map<JitLocation, JitTrace>,
    loc: JitLocation,
)
    ensures
        pending_checked(traces, loc) == (ControlPoint::Finished {
            transition: JitTransition::IncrementedHotCount,
        }) <==> holds(traces, loc, JitTrace::TracePending),
        pending_checked(traces, loc) == (ControlPoint::CheckUntraced { loc }) <==> !holds(
            traces,
            loc,
            JitTrace::TracePending,
        ),
{
}

/// A step of a call changes at most one thing: marking the trace store, counting the hot counts, and
/// compiling the compilations. A step makes the change at its own location alone.
pub proof fn law_a_step_changes_one_thing(call: ControlPoint, jit: JitView, phase: JitPhase)
    requires
        call.ready(jit),
    ensures
        ({
            let (after, phase1, next) = call.step(jit, phase);
            &&& call matches ControlPoint::Mark { loc } ==> after.traces.remove(loc)
                == jit.traces.remove(loc) && holds(after.traces, loc, JitTrace::TracePending)
            &&& call matches ControlPoint::Count { loc } ==> after.counts.remove(loc)
                == jit.counts.remove(loc) && after.counts.dom().contains(loc) && after.counts[loc]
                == 1 + if jit.counts.dom().contains(loc) {
                jit.counts[loc] as int
            } else {
                0
            }
            &&& call matches ControlPoint::Compile { loc } ==> after.jobs.len() == jit.jobs.len()
                + 1 && after.jobs.drop_last() == jit.jobs && after.jobs.last().loc == loc
            &&& !(call is Mark) ==> after.traces == jit.traces
            &&& !(call is Count) ==> after.counts == jit.counts
            &&& !(call is Compile) ==> after.jobs == jit.jobs
        }),
{
    let (after, phase1, next) = call.step(jit, phase);
    match call {
        ControlPoint::Mark { loc } => {
            assert(after.traces.remove(loc) =~= jit.traces.remove(loc));
        },
        ControlPoint::Count { loc } => {
            assert(after.counts.remove(loc) =~= jit.counts.remove(loc));
        },
        ControlPoint::Compile { loc } => {
            assert(after.jobs.drop_last() =~= jit.jobs);
        },
        _ => {},
    }
}

/// A step can be taken unless the call is over, the location's hot count is exhausted, or the
/// location that is to be marked has an entry already.
pub proof fn law_when_a_step_can_be_taken(call: ControlPoint, jit: JitView)
    ensures
        !call.ready(jit) <==> {
            ||| call is Finished
            ||| call matches ControlPoint::Count { loc } && jit.counts.dom().contains(loc)
                && jit.counts[loc] == 0xffff_ffff
            ||| call matches ControlPoint::CheckUntraced { loc } && jit.traces.dom().contains(loc)
        },
{
}

} // verus!
