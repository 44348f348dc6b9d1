//! What holds of the control point beyond a single call.
use vstd::prelude::*;

use crate::context::compile_job;
use crate::control::{
    callable, control_point, law_steps_make_the_call, outcome, ControlPoint, JitView,
};
use crate::hot_counts::count_of;
use crate::threads::{
    claims, is_path, is_run, lemma_initial, lemma_turn, lemma_turn_attended, Stage, System, Thread,
    Turn, Worker,
};
use crate::traces::settable;
use crate::types::{HotCount, JitLocation, JitPhase, JitTrace, JitTransition, HOT_THRESHOLD};

verus! {

/// Every state of every run satisfies the invariant.
pub proof fn law_invariant(states: Seq<System>, turns: Seq<Turn>, i: int)
    requires
        is_run(states, turns),
        0 <= i < states.len(),
    ensures
        states[i].inv(),
    decreases i,
{
    if i == 0 {
        lemma_initial();
    } else {
        law_invariant(states, turns, i - 1);
        assert(states[i - 1].enabled(turns[i - 1]));
        lemma_turn(states[i - 1], turns[i - 1]);
    }
}

/// The checks that come before a trace is stored never fail, and what they saw still holds when
/// the trace is stored: nothing is stored for a location that a thread is about to mark, and a
/// location whose trace is being compiled is marked as pending.
pub proof fn law_checks_hold(states: Seq<System>, turns: Seq<Turn>, i: int)
    requires
        is_run(states, turns),
        0 <= i < states.len(),
    ensures
        forall|id: int, loc: JitLocation|
            states[i].threads.contains_key(id) && #[trigger] claims(states[i].threads[id], loc)
                ==> settable(states[i].jit.traces, loc, JitTrace::TracePending),
        forall|job: int|
            0 <= job < states[i].stages.len() && !(#[trigger] states[i].stages[job] is Done)
                ==> settable(
                states[i].jit.traces,
                states[i].jit.jobs[job].loc,
                JitTrace::FinalisedTrace,
            ),
{
    law_invariant(states, turns, i);
    let s = states[i];
    assert forall|id: int, loc: JitLocation|
        s.threads.contains_key(id) && #[trigger] claims(s.threads[id], loc) implies settable(
        s.jit.traces,
        loc,
        JitTrace::TracePending,
    ) by {
        assert(s.works_on(Worker::Interpreter { id }, loc));
    }
    assert forall|job: int|
        0 <= job < s.stages.len() && !(#[trigger] s.stages[job] is Done) implies settable(
        s.jit.traces,
        s.jit.jobs[job].loc,
        JitTrace::FinalisedTrace,
    ) by {
        assert(s.works_on(Worker::Compiler { job }, s.jit.jobs[job].loc));
    }
}

/// No thread is ever stuck: a call of the control point can go on or return, and a compiler thread
/// can go on, unless a hot count is exhausted.
pub proof fn law_no_thread_is_stuck(states: Seq<System>, turns: Seq<Turn>, i: int)
    requires
        is_run(states, turns),
        0 <= i < states.len(),
    ensures
        forall|id: int| #[trigger]
            states[i].threads.contains_key(id) ==> match states[i].threads[id].call {
                None => forall|loc: JitLocation| states[i].enabled(Turn::Call { id, loc }),
                Some(ControlPoint::Finished { .. }) => states[i].enabled(Turn::Return { id }),
                Some(ControlPoint::Count { loc }) => count_of(states[i].jit.counts, loc)
                    < HotCount::MAX ==> states[i].enabled(Turn::Step { id }),
                Some(_) => states[i].enabled(Turn::Step { id }),
            },
        forall|job: int|
            0 <= job < states[i].stages.len() ==> match #[trigger] states[i].stages[job] {
                Stage::Checking => states[i].enabled(Turn::Check { job }),
                Stage::Storing => states[i].enabled(Turn::Store { job }),
                Stage::Done => true,
            },
{
    law_invariant(states, turns, i);
    law_checks_hold(states, turns, i);
    let s = states[i];
    assert forall|id: int| #[trigger] s.threads.contains_key(id) implies match s.threads[id].call {
        None => forall|loc: JitLocation| s.enabled(Turn::Call { id, loc }),
        Some(ControlPoint::Finished { .. }) => s.enabled(Turn::Return { id }),
        Some(ControlPoint::Count { loc }) => count_of(s.jit.counts, loc) < HotCount::MAX
            ==> s.enabled(Turn::Step { id }),
        Some(_) => s.enabled(Turn::Step { id }),
    } by {
        if let Some(ControlPoint::CheckUntraced { loc }) = s.threads[id].call {
            assert(claims(s.threads[id], loc));
        }
    }
}

/// The control point is never called from within a trace.
pub proof fn law_not_called_from_a_trace(states: Seq<System>, turns: Seq<Turn>, i: int, id: int)
    requires
        is_run(states, turns),
        0 <= i < states.len(),
        states[i].threads.contains_key(id),
    ensures
        !(states[i].threads[id].phase is RunningTrace),
{
    law_invariant(states, turns, i);
}

/// At no time do two threads trace or compile one location, or are about to.
pub proof fn law_one_worker(
    states: Seq<System>,
    turns: Seq<Turn>,
    i: int,
    v: Worker,
    w: Worker,
    loc: JitLocation,
)
    requires
        is_run(states, turns),
        0 <= i < states.len(),
        states[i].works_on(v, loc),
        states[i].works_on(w, loc),
    ensures
        v == w,
{
    law_invariant(states, turns, i);
}

/// A location that a thread is tracing or compiling is marked as pending.
pub proof fn law_worker_means_pending(
    states: Seq<System>,
    turns: Seq<Turn>,
    i: int,
    w: Worker,
    loc: JitLocation,
)
    requires
        is_run(states, turns),
        0 <= i < states.len(),
        states[i].traces_or_compiles(w, loc),
    ensures
        states[i].trace(loc) == Some(JitTrace::TracePending),
{
    law_invariant(states, turns, i);
    assert(states[i].works_on(w, loc));
}

/// A location that is marked as pending is being traced or compiled by some thread, as long as no
/// thread has ended in the middle of tracing.
pub proof fn law_pending_means_worker(
    states: Seq<System>,
    turns: Seq<Turn>,
    i: int,
    loc: JitLocation,
)
    requires
        is_run(states, turns),
        0 <= i < states.len(),
        forall|k: int| 0 <= k < i ==> !(#[trigger] states[k].abandons(turns[k])),
        states[i].trace(loc) == Some(JitTrace::TracePending),
    ensures
        exists|w: Worker| states[i].traces_or_compiles(w, loc),
{
    lemma_attended(states, turns, i);
}

proof fn lemma_attended(states: Seq<System>, turns: Seq<Turn>, i: int)
    requires
        is_run(states, turns),
        0 <= i < states.len(),
        forall|k: int| 0 <= k < i ==> !(#[trigger] states[k].abandons(turns[k])),
    ensures
        states[i].attended(),
    decreases i,
{
    if i == 0 {
        lemma_initial();
    } else {
        lemma_attended(states, turns, i - 1);
        law_invariant(states, turns, i - 1);
        assert(states[i - 1].enabled(turns[i - 1]));
        assert(!states[i - 1].abandons(turns[i - 1]));
        lemma_turn_attended(states[i - 1], turns[i - 1]);
    }
}

/// A location is in the trace store, or a thread is about to mark it there, exactly when it has
/// been interpreted as often as the threshold says: no hot location is passed over, and no cold
/// one is traced.
pub proof fn law_hot_means_traced(states: Seq<System>, turns: Seq<Turn>, i: int, loc: JitLocation)
    requires
        is_run(states, turns),
        0 <= i < states.len(),
    ensures
        count_of(states[i].jit.counts, loc) >= HOT_THRESHOLD <==> {
            ||| states[i].trace(loc) is Some
            ||| exists|id: int|
                states[i].threads.contains_key(id) && #[trigger] claims(states[i].threads[id], loc)
        },
{
    law_invariant(states, turns, i);
    let s = states[i];
    if s.hot(loc) && s.trace(loc) is None {
        let w = choose|w: Worker| s.works_on(w, loc);
        assert(!s.traces_or_compiles(w, loc));
        assert(claims(s.threads[w->id], loc));
    }
    if exists|id: int| s.threads.contains_key(id) && #[trigger] claims(s.threads[id], loc) {
        let id = choose|id: int|
            s.threads.contains_key(id) && #[trigger] claims(s.threads[id], loc);
        assert(s.works_on(Worker::Interpreter { id }, loc));
    }
}

/// How far the trace of a location has come: not there, pending, finished.
pub open spec fn progress(trace: Option<JitTrace>) -> nat {
    match trace {
        None => 0,
        Some(JitTrace::TracePending) => 1,
        Some(JitTrace::FinalisedTrace) => 2,
    }
}

/// From one state of a run to a later one, no hot count goes down, and no trace goes back from
/// finished to pending, or leaves the store.
pub proof fn law_nothing_is_undone(
    states: Seq<System>,
    turns: Seq<Turn>,
    i: int,
    j: int,
    loc: JitLocation,
)
    requires
        is_run(states, turns),
        0 <= i <= j < states.len(),
    ensures
        count_of(states[i].jit.counts, loc) <= count_of(states[j].jit.counts, loc),
        progress(states[i].trace(loc)) <= progress(states[j].trace(loc)),
    decreases j,
{
    if i < j {
        law_nothing_is_undone(states, turns, i, j - 1, loc);
        law_invariant(states, turns, j - 1);
        let s = states[j - 1];
        assert(s.enabled(turns[j - 1]));
        match turns[j - 1] {
            Turn::Step { id } => {
                if let Some(ControlPoint::Mark { loc: at }) = s.threads[id].call {
                    assert(s.works_on(Worker::Interpreter { id }, at));
                }
            },
            _ => {},
        }
    }
}

/// The turn is a thread's visit to the hot counts on account of `loc`.
pub open spec fn counts(s: System, turn: Turn, loc: JitLocation) -> bool {
    turn matches Turn::Step { id } && s.threads[id].call == Some(ControlPoint::Count { loc })
}

/// How many of the first `i` turns count `loc`.
pub open spec fn times_counted(
    states: Seq<System>,
    turns: Seq<Turn>,
    i: int,
    loc: JitLocation,
) -> nat
    decreases i,
{
    if i <= 0 {
        0
    } else if counts(states[i - 1], turns[i - 1], loc) {
        times_counted(states, turns, i - 1, loc) + 1
    } else {
        times_counted(states, turns, i - 1, loc)
    }
}

/// The hot count of a location says how often it has been counted, by all threads together: no
/// increment is lost, and nothing else changes a hot count.
pub proof fn law_hot_count_is_exact(
    states: Seq<System>,
    turns: Seq<Turn>,
    i: int,
    loc: JitLocation,
)
    requires
        is_run(states, turns),
        0 <= i < states.len(),
    ensures
        count_of(states[i].jit.counts, loc) == times_counted(states, turns, i, loc),
    decreases i,
{
    if i > 0 {
        law_hot_count_is_exact(states, turns, i - 1, loc);
        assert(states[i - 1].enabled(turns[i - 1]));
    }
}

/// The turn writes the "trace pending" marker of `loc`.
pub open spec fn marks(s: System, turn: Turn, loc: JitLocation) -> bool {
    turn matches Turn::Step { id } && s.threads[id].call == Some(ControlPoint::Mark { loc })
}

/// However many threads come by, a location is marked, and so traced, at most once in a run.
pub proof fn law_traced_once(
    states: Seq<System>,
    turns: Seq<Turn>,
    i: int,
    j: int,
    loc: JitLocation,
)
    requires
        is_run(states, turns),
        0 <= i < turns.len(),
        0 <= j < turns.len(),
        marks(states[i], turns[i], loc),
        marks(states[j], turns[j], loc),
    ensures
        i == j,
{
    if i < j {
        lemma_not_marked_again(states, turns, i, j, loc);
    } else if j < i {
        lemma_not_marked_again(states, turns, j, i, loc);
    }
}

proof fn lemma_not_marked_again(
    states: Seq<System>,
    turns: Seq<Turn>,
    i: int,
    j: int,
    loc: JitLocation,
)
    requires
        is_run(states, turns),
        0 <= i < j < turns.len(),
        marks(states[i], turns[i], loc),
    ensures
        !marks(states[j], turns[j], loc),
{
    assert(states[i].enabled(turns[i]));
    assert(states[i + 1].trace(loc) is Some);
    law_nothing_is_undone(states, turns, i + 1, j, loc);
    if marks(states[j], turns[j], loc) {
        assert(states[j].enabled(turns[j]));
        law_checks_hold(states, turns, j);
        assert(claims(states[j].threads[turns[j]->Step_id], loc));
    }
}

/// A location is compiled at most once in a run.
pub proof fn law_compiled_once(states: Seq<System>, turns: Seq<Turn>, i: int, a: int, b: int)
    requires
        is_run(states, turns),
        0 <= i < states.len(),
        0 <= a < states[i].jit.jobs.len(),
        0 <= b < states[i].jit.jobs.len(),
        states[i].jit.jobs[a].loc == states[i].jit.jobs[b].loc,
    ensures
        a == b,
{
    law_invariant(states, turns, i);
}

/// A call of the control point that no other thread interrupts: the turns of the thread `id`, from
/// where it calls the control point to where the call returns, make up what [`control_point`] says.
/// The path that shows it comes back.
pub proof fn law_uninterrupted_call(s: System, id: int, loc: JitLocation) -> (path: (
    Seq<System>,
    Seq<Turn>,
))
    requires
        s.threads.contains_key(id),
        s.threads[id].call is None,
        callable(s.jit, s.threads[id].phase, loc),
    ensures
        ({
            let (states, turns) = path;
            let (jit, phase, transition) = control_point(s.jit, s.threads[id].phase, loc);
            &&& is_path(states, turns)
            &&& turns.len() >= 2
            &&& turns[0] == (Turn::Call { id, loc })
            &&& turns.last() == (Turn::Return { id })
            &&& forall|k: int|
                0 < k < turns.len() - 1 ==> #[trigger] turns[k] == (Turn::Step { id })
            &&& states[0] == s
            &&& states[states.len() - 2].threads[id].call == Some(
                ControlPoint::Finished { transition },
            )
            &&& states.last().jit == jit
            &&& states.last().threads == s.threads.insert(id, Thread { phase, call: None })
            &&& states.last().stages == if transition is FinishedTracing {
                s.stages.push(Stage::Checking)
            } else {
                s.stages
            }
        }),
{
    let phase = s.threads[id].phase;
    law_steps_make_the_call(s.jit, phase, loc);
    let turn = Turn::Call { id, loc };
    let (states, turns) = lemma_uninterrupted_rest(s.after(turn), id);
    assert(s.enabled(turn));
    lemma_path_from(s, turn, states, turns);
    let all_states = seq![s] + states;
    let all_turns = seq![turn] + turns;
    assert(all_states[all_states.len() - 2] == states[states.len() - 2]);
    assert(all_states.last().threads =~= s.threads.insert(id, all_states.last().threads[id]));
    assert forall|k: int| 0 < k < all_turns.len() - 1 implies #[trigger] all_turns[k] == (
    Turn::Step { id }) by {
        assert(all_turns[k] == turns[k - 1]);
    }
    (all_states, all_turns)
}

/// A compilation that no other thread interrupts: the check and the store of the compiler thread
/// make up what running its job does.
pub proof fn law_uninterrupted_compilation(s: System, job: int)
    requires
        0 <= job < s.stages.len(),
        s.stages[job] is Checking,
        settable(s.jit.traces, s.jit.jobs[job].loc, JitTrace::FinalisedTrace),
    ensures
        s.enabled(Turn::Check { job }),
        s.after(Turn::Check { job }).enabled(Turn::Store { job }),
        s.after(Turn::Check { job }).after(Turn::Store { job }) == (System {
            jit: JitView {
                traces: s.jit.traces.insert(s.jit.jobs[job].loc, JitTrace::FinalisedTrace),
                ..s.jit
            },
            stages: s.stages.update(job, Stage::Done),
            ..s
        }),
{
    assert(s.stages.update(job, Stage::Storing).update(job, Stage::Done) =~= s.stages.update(
        job,
        Stage::Done,
    ));
}

/// A path with one turn more in front of it.
proof fn lemma_path_from(s: System, turn: Turn, states: Seq<System>, turns: Seq<Turn>)
    requires
        s.enabled(turn),
        is_path(states, turns),
        states[0] == s.after(turn),
    ensures
        is_path(seq![s] + states, seq![turn] + turns),
{
    let all_states = seq![s] + states;
    let all_turns = seq![turn] + turns;
    assert forall|i: int| 0 <= i < all_turns.len() implies #[trigger] all_states[i].enabled(
        all_turns[i],
    ) && all_states[i + 1] == all_states[i].after(all_turns[i]) by {
        if i > 0 {
            assert(states[i - 1].enabled(turns[i - 1]));
            assert(all_states[i] == states[i - 1]);
            assert(all_turns[i] == turns[i - 1]);
            assert(all_states[i + 1] == states[i]);
        }
    }
}

/// The rest of a call with which no other thread has interfered so far, up to its return.
proof fn lemma_uninterrupted_rest(s: System, id: int) -> (path: (Seq<System>, Seq<Turn>))
    requires
        s.threads.contains_key(id),
        s.threads[id].call matches Some(call) && call.fits(s.threads[id].phase) && call.undisturbed(
            s.jit,
        ),
    ensures
        ({
            let (states, turns) = path;
            let (jit, phase, transition) = outcome(
                s.jit,
                s.threads[id].phase,
                s.threads[id].call.unwrap(),
            );
            &&& is_path(states, turns)
            &&& turns.len() >= 1
            &&& turns.last() == (Turn::Return { id })
            &&& forall|k: int|
                0 <= k < turns.len() - 1 ==> #[trigger] turns[k] == (Turn::Step { id })
            &&& states[0] == s
            &&& states[states.len() - 2].threads[id].call == Some(
                ControlPoint::Finished { transition },
            )
            &&& states.last().jit == jit
            &&& states.last().threads == s.threads.insert(id, Thread { phase, call: None })
            &&& states.last().stages == if s.threads[id].call.unwrap() is Compile {
                s.stages.push(Stage::Checking)
            } else {
                s.stages
            }
        }),
    decreases s.threads[id].call.unwrap().steps_left(),
{
    let call = s.threads[id].call.unwrap();
    if call is Finished {
        let turn = Turn::Return { id };
        let states = seq![s, s.after(turn)];
        let turns = seq![turn];
        assert(s.enabled(turn));
        (states, turns)
    } else {
        let turn = Turn::Step { id };
        let t = s.after(turn);
        assert(s.enabled(turn));
        let (states, turns) = lemma_uninterrupted_rest(t, id);
        lemma_path_from(s, turn, states, turns);
        let all_states = seq![s] + states;
        let all_turns = seq![turn] + turns;
        assert(all_states[all_states.len() - 2] == states[states.len() - 2]);
        assert(all_states.last().threads =~= s.threads.insert(id, all_states.last().threads[id]));
        assert forall|k: int| 0 <= k < all_turns.len() - 1 implies #[trigger] all_turns[k] == (
        Turn::Step { id }) by {
            if k > 0 {
                assert(all_turns[k] == turns[k - 1]);
            }
        }
        (all_states, all_turns)
    }
}

/// `n` calls of the control point at `loc`, one after the other: the shared state and the phase as
/// they are afterwards, and what the calls returned.
pub open spec fn calls(jit: JitView, phase: JitPhase, loc: JitLocation, n: nat) -> (
    JitView,
    JitPhase,
    Seq<JitTransition>,
)
    decreases n,
{
    if n == 0 {
        (jit, phase, Seq::empty())
    } else {
        let (jit0, phase0, transitions) = calls(jit, phase, loc, (n - 1) as nat);
        let (jit1, phase1, transition) = control_point(jit0, phase0, loc);
        (jit1, phase1, transitions.push(transition))
    }
}

/// The same transition, `n` times.
pub open spec fn repeated(transition: JitTransition, n: nat) -> Seq<JitTransition> {
    Seq::new(n, |i: int| transition)
}

/// As long as a location stays below the threshold, or its trace is pending, a thread that
/// interprets it does nothing but count, once per call.
pub proof fn law_only_counts(jit: JitView, loc: JitLocation, n: nat)
    requires
        match jit.traces.get(loc) {
            None => count_of(jit.counts, loc) + n < HOT_THRESHOLD,
            Some(JitTrace::TracePending) => count_of(jit.counts, loc) + n <= HotCount::MAX,
            Some(JitTrace::FinalisedTrace) => false,
        },
    ensures
        ({
            let (jit1, phase1, transitions) = calls(jit, JitPhase::Interpreting, loc, n);
            &&& jit1.traces == jit.traces
            &&& jit1.jobs == jit.jobs
            &&& jit1.counts == if n == 0 {
                jit.counts
            } else {
                jit.counts.insert(loc, (count_of(jit.counts, loc) + n) as HotCount)
            }
            &&& phase1 == JitPhase::Interpreting
            &&& transitions == repeated(JitTransition::IncrementedHotCount, n)
        }),
    decreases n,
{
    if n > 0 {
        law_only_counts(jit, loc, (n - 1) as nat);
        let (jit1, phase1, transitions) = calls(jit, JitPhase::Interpreting, loc, n);
        assert(jit1.counts =~= jit.counts.insert(
            loc,
            (count_of(jit.counts, loc) + n) as HotCount,
        ));
        assert(transitions =~= repeated(JitTransition::IncrementedHotCount, n));
    } else {
        assert(calls(jit, JitPhase::Interpreting, loc, n).2 =~= repeated(
            JitTransition::IncrementedHotCount,
            n,
        ));
    }
}

/// The life of a location that is not hot yet, however often it has been counted: it is counted up
/// to the threshold, where tracing starts. When it comes up again the loop has been traced once,
/// tracing stops, and the trace goes to a compiler thread, marked as pending.
pub proof fn law_location_is_traced(jit: JitView, loc: JitLocation)
    requires
        jit.traces.get(loc) is None,
        count_of(jit.counts, loc) < HOT_THRESHOLD,
    ensures
        ({
            let missing = (HOT_THRESHOLD - count_of(jit.counts, loc)) as nat;
            let marked = JitView {
                traces: jit.traces.insert(loc, JitTrace::TracePending),
                counts: jit.counts.insert(loc, HOT_THRESHOLD),
                ..jit
            };
            let transitions = repeated(
                JitTransition::IncrementedHotCount,
                (missing - 1) as nat,
            ).push(JitTransition::StartedTracing);
            &&& calls(jit, JitPhase::Interpreting, loc, missing) == (
                marked,
                JitPhase::Tracing(loc),
                transitions,
            )
            &&& calls(jit, JitPhase::Interpreting, loc, missing + 1) == (
                JitView { jobs: jit.jobs.push(compile_job(loc)), ..marked },
                JitPhase::Interpreting,
                transitions.push(JitTransition::FinishedTracing),
            )
        }),
{
    let missing = (HOT_THRESHOLD - count_of(jit.counts, loc)) as nat;
    law_only_counts(jit, loc, (missing - 1) as nat);
    let (jit1, phase1, transitions) = calls(jit, JitPhase::Interpreting, loc, missing);
    assert(jit1.counts =~= jit.counts.insert(loc, HOT_THRESHOLD));
}

/// Once its trace is finished, a location's trace is executed at every call, and nothing else
/// happens.
pub proof fn law_finished_trace_is_executed(jit: JitView, loc: JitLocation, n: nat)
    requires
        jit.traces.get(loc) == Some(JitTrace::FinalisedTrace),
    ensures
        calls(jit, JitPhase::Interpreting, loc, n) == (
            jit,
            JitPhase::Interpreting,
            repeated(JitTransition::ExecutedTrace, n),
        ),
    decreases n,
{
    if n > 0 {
        law_finished_trace_is_executed(jit, loc, (n - 1) as nat);
    }
    assert(calls(jit, JitPhase::Interpreting, loc, n).2 =~= repeated(
        JitTransition::ExecutedTrace,
        n,
    ));
}

/// From counting to its trace: a location that is not hot yet is traced, the trace can be stored as
/// a compiler thread does it, and from then on it is executed at every call.
pub proof fn law_location_comes_to_be_executed(jit: JitView, loc: JitLocation, n: nat)
    requires
        jit.traces.get(loc) is None,
        count_of(jit.counts, loc) < HOT_THRESHOLD,
    ensures
        ({
            let missing = (HOT_THRESHOLD - count_of(jit.counts, loc)) as nat;
            let (traced, phase, _) = calls(jit, JitPhase::Interpreting, loc, missing + 1);
            let compiled = JitView {
                traces: traced.traces.insert(loc, JitTrace::FinalisedTrace),
                ..traced
            };
            &&& settable(traced.traces, loc, JitTrace::FinalisedTrace)
            &&& calls(compiled, phase, loc, n) == (
                compiled,
                JitPhase::Interpreting,
                repeated(JitTransition::ExecutedTrace, n),
            )
        }),
{
    law_location_is_traced(jit, loc);
    let missing = (HOT_THRESHOLD - count_of(jit.counts, loc)) as nat;
    let (traced, phase, _) = calls(jit, JitPhase::Interpreting, loc, missing + 1);
    let compiled = JitView {
        traces: traced.traces.insert(loc, JitTrace::FinalisedTrace),
        ..traced
    };
    law_finished_trace_is_executed(compiled, loc, n);
}

/// While a thread traces, any location but the one where the trace starts only goes into the trace.
pub proof fn law_tracing_goes_on(
    jit: JitView,
    start_loc: JitLocation,
    loc: JitLocation,
    n: nat,
)
    requires
        loc != start_loc,
    ensures
        calls(jit, JitPhase::Tracing(start_loc), loc, n) == (
            jit,
            JitPhase::Tracing(start_loc),
            repeated(JitTransition::ContinuedTracing, n),
        ),
    decreases n,
{
    if n > 0 {
        law_tracing_goes_on(jit, start_loc, loc, (n - 1) as nat);
    }
    assert(calls(jit, JitPhase::Tracing(start_loc), loc, n).2 =~= repeated(
        JitTransition::ContinuedTracing,
        n,
    ));
}

/// A call at one location leaves the hot counts and the traces of all others as they are.
pub proof fn law_other_locations_are_left_alone(
    jit: JitView,
    phase: JitPhase,
    loc: JitLocation,
    other: JitLocation,
)
    requires
        callable(jit, phase, loc),
        other != loc,
    ensures
        ({
            let (jit1, phase1, transition) = control_point(jit, phase, loc);
            &&& jit1.traces.get(other) == jit.traces.get(other)
            &&& count_of(jit1.counts, other) == count_of(jit.counts, other)
        }),
{
}

/// A call never leaves a thread in the middle of a trace, so that the thread can make the next.
pub proof fn law_no_call_ends_in_a_trace(jit: JitView, phase: JitPhase, loc: JitLocation)
    requires
        callable(jit, phase, loc),
    ensures
        !(control_point(jit, phase, loc).1 is RunningTrace),
{
}

} // verus!
